//! Settings model and the compare-and-swap updater.
//!
//! A unit's settings are an immutable, cheaply copied key/value table.  The
//! control context edits them with an optimistic protocol: read a snapshot,
//! derive the edited table, and commit it only if the settings are still the
//! snapshot that was read; on conflict, retry from a fresh snapshot.  The
//! scheduler never blocks on this path — it only reads settings.  A caller
//! that keeps losing the race because the unit itself was replaced must
//! abort instead of retrying without bound; [`update_retry_decision`] makes
//! that call.

use vstd::prelude::*;
use crate::text::str_eq;
use crate::assoc::assoc_get;
use crate::assoc::assoc_set;
use crate::assoc::lemma_assoc_get_set_same;
use crate::assoc::lemma_assoc_get_set_other;
use crate::assoc::lemma_assoc_get_at;
use crate::assoc::lemma_assoc_get_absent;
use crate::assoc::lemma_assoc_set_at;
use crate::assoc::lemma_assoc_set_absent;

verus! {

/// One setting value, as plain data.
#[derive(Debug)]
pub enum SettingsValue {
    Bool(bool),
    I64(i64),
    Text(String),
}

/// Mathematical image of a [`SettingsValue`].
pub enum SettingsValueView {
    Bool(bool),
    I64(i64),
    Text(Seq<char>),
}

impl View for SettingsValue {
    type V = SettingsValueView;

    open spec fn view(&self) -> SettingsValueView {
        match self {
            SettingsValue::Bool(b) => SettingsValueView::Bool(*b),
            SettingsValue::I64(n) => SettingsValueView::I64(*n),
            SettingsValue::Text(s) => SettingsValueView::Text(s@),
        }
    }
}

impl SettingsValue {
    /// An equal value, built from fresh allocations.
    pub fn duplicate(&self) -> (r: Self)
        ensures
            r == *self,
    {
        match self {
            SettingsValue::Bool(b) => SettingsValue::Bool(*b),
            SettingsValue::I64(n) => SettingsValue::I64(*n),
            SettingsValue::Text(s) => SettingsValue::Text(s.clone()),
        }
    }
}

/// An association list of keys and values, first match relevant.
pub type SettingsEntries = Seq<(Seq<char>, SettingsValueView)>;

/// An immutable key/value table of settings.
#[derive(Debug)]
pub struct SettingsMap {
    entries: Vec<(String, SettingsValue)>,
}

impl View for SettingsMap {
    type V = SettingsEntries;

    closed spec fn view(&self) -> SettingsEntries {
        self.entries@.map_values(|e: (String, SettingsValue)| (e.0@, e.1@))
    }
}

impl SettingsMap {
    /// A table with no entries.
    pub fn new() -> (m: Self)
        ensures
            m@ == Seq::<(Seq<char>, SettingsValueView)>::empty(),
    {
        let m = SettingsMap { entries: Vec::new() };
        assert(m@ =~= Seq::<(Seq<char>, SettingsValueView)>::empty());
        m
    }

    /// The number of entries.
    pub fn len(&self) -> (n: usize)
        ensures
            n == self@.len(),
    {
        self.entries.len()
    }

    /// The value stored under `key`, if any.
    pub fn get(&self, key: &str) -> (r: Option<&SettingsValue>)
        ensures
            match r {
                Some(v) => assoc_get(self@, key@) == Some(v@),
                None => assoc_get(self@, key@) is None,
            },
    {
        let n = self.entries.len();
        let mut i: usize = 0;
        while i < n
            invariant
                0 <= i <= n,
                n == self.entries@.len(),
                forall|j: int| 0 <= j < i ==> self@[j].0 != key@,
            decreases n - i,
        {
            let e = &self.entries[i];
            if str_eq(e.0.as_str(), key) {
                assert(self@[i as int].0 == key@);
                proof {
                    lemma_assoc_get_at(self@, key@, i as int);
                }
                return Some(&e.1);
            }
            assert(self@[i as int].0 != key@);
            i = i + 1;
        }
        proof {
            lemma_assoc_get_absent(self@, key@);
        }
        None
    }

    /// Set `key` to `value`: replace its entry in place, or append one.
    pub fn insert(&mut self, key: String, value: SettingsValue)
        ensures
            final(self)@ == assoc_set(old(self)@, key@, value@),
    {
        let n = self.entries.len();
        let mut i: usize = 0;
        while i < n
            invariant
                0 <= i <= n,
                n == self.entries@.len(),
                *self == *old(self),
                forall|j: int| 0 <= j < i ==> self@[j].0 != key@,
            decreases n - i,
        {
            if str_eq(self.entries[i].0.as_str(), key.as_str()) {
                assert(self@[i as int].0 == key@);
                proof {
                    lemma_assoc_set_at(self@, key@, value@, i as int);
                }
                let ghost pre = self@;
                self.entries.set(i, (key, value));
                assert(self@ =~= pre.update(i as int, (pre[i as int].0, value@)).update(
                    i as int,
                    (key@, value@),
                ));
                assert(final(self)@ =~= assoc_set(old(self)@, key@, value@));
                return ;
            }
            assert(self@[i as int].0 != key@);
            i = i + 1;
        }
        proof {
            lemma_assoc_set_absent(self@, key@, value@);
        }
        let ghost pre = self@;
        self.entries.push((key, value));
        assert(self@ =~= pre.push((key@, value@)));
    }

    /// An equal table, built from fresh allocations.
    pub fn duplicate(&self) -> (r: Self)
        ensures
            r@ == self@,
    {
        let n = self.entries.len();
        let mut out: Vec<(String, SettingsValue)> = Vec::new();
        let mut i: usize = 0;
        while i < n
            invariant
                0 <= i <= n,
                n == self.entries@.len(),
                out@.len() == i,
                forall|j: int| 0 <= j < i ==> out@[j] == self.entries@[j],
            decreases n - i,
        {
            let e = &self.entries[i];
            out.push((e.0.clone(), e.1.duplicate()));
            i = i + 1;
        }
        let r = SettingsMap { entries: out };
        assert(r@ =~= self@);
        r
    }
}

/// The version after a successful commit.
pub open spec fn bump(v: u64) -> u64 {
    if v == u64::MAX {
        0
    } else {
        (v + 1) as u64
    }
}

/// A commit always moves the version: a snapshot taken before someone else's
/// commit can never pass the conditional swap, so a lost race is always
/// detected and resolved by retrying from a fresh snapshot.
pub proof fn lemma_bump_changes_version(v: u64)
    ensures
        bump(v) != v,
{
}

/// The settings slot of the active unit: the current table and a version
/// that moves on every committed replacement.  Models "replace the settings
/// only if unchanged since they were read".
pub struct SettingsCell {
    map: SettingsMap,
    version: u64,
}

impl SettingsCell {
    /// The current table.
    pub closed spec fn map_view(&self) -> SettingsEntries {
        self.map@
    }

    /// The current version.
    pub closed spec fn version_spec(&self) -> u64 {
        self.version
    }

    /// A cell initially holding `map`.
    pub fn new(map: SettingsMap) -> (c: Self)
        ensures
            c.map_view() == map@,
            c.version_spec() == 0,
    {
        SettingsCell { map, version: 0 }
    }

    /// Read the current table and the version it carries.  Cheap and never
    /// blocked by writers.
    pub fn snapshot(&self) -> (r: (SettingsMap, u64))
        ensures
            r.0@ == self.map_view(),
            r.1 == self.version_spec(),
    {
        (self.map.duplicate(), self.version)
    }

    /// Commit `new_map` only if the cell still carries version `expected`.
    /// Returns whether the commit happened; on conflict nothing changes.
    pub fn compare_and_swap(&mut self, expected: u64, new_map: SettingsMap) -> (committed: bool)
        ensures
            committed == (expected == old(self).version_spec()),
            committed ==> final(self).map_view() == new_map@ && final(self).version_spec()
                == bump(old(self).version_spec()),
            !committed ==> *final(self) == *old(self),
    {
        if expected == self.version {
            self.map = new_map;
            self.version = if self.version == u64::MAX {
                0
            } else {
                self.version + 1
            };
            true
        } else {
            false
        }
    }
}

/// Apply one edit to the settings with the optimistic protocol: snapshot,
/// derive the edited table, commit if unchanged.  Under this exclusive
/// borrow no concurrent commit can intervene, so the first attempt lands;
/// a caller racing other writers repeats these steps, as
/// [`update_retry_decision`] directs.
pub fn update_setting(cell: &mut SettingsCell, key: &str, value: SettingsValue)
    ensures
        final(cell).map_view() == assoc_set(old(cell).map_view(), key@, value@),
        final(cell).version_spec() == bump(old(cell).version_spec()),
{
    let (snap, version) = cell.snapshot();
    let mut edited = snap;
    edited.insert(key.to_owned(), value);
    let committed = cell.compare_and_swap(version, edited);
    assert(committed);
}

/// Outcome of one conditional-swap attempt against the real unit.
#[derive(Clone, Copy, Debug, PartialEq, Eq, Structural)]
pub enum CasAttempt {
    /// The swap was committed.
    Committed,
    /// The settings changed between snapshot and swap; nothing was applied.
    Conflicted,
}

/// What the updater does after one attempt.
#[derive(Clone, Copy, Debug, PartialEq, Eq, Structural)]
pub enum UpdateDecision {
    /// The edit is applied; stop.
    Done,
    /// Lost a race against another settings writer: read a fresh snapshot
    /// and try again.
    RetryFresh,
    /// The unit itself was replaced since the update began; the old
    /// generation can never be committed again, so stop without retrying.
    Abort,
}

/// Decide whether an in-flight update is finished, must retry, or must give
/// up because the unit changed under it.
pub fn update_retry_decision(
    attempt: CasAttempt,
    unit_generation_at_start: u64,
    unit_generation_now: u64,
) -> (d: UpdateDecision)
    ensures
        attempt is Committed ==> d is Done,
        attempt is Conflicted && unit_generation_now != unit_generation_at_start ==> d is Abort,
        attempt is Conflicted && unit_generation_now == unit_generation_at_start
            ==> d is RetryFresh,
{
    match attempt {
        CasAttempt::Committed => UpdateDecision::Done,
        CasAttempt::Conflicted => {
            if unit_generation_now != unit_generation_at_start {
                UpdateDecision::Abort
            } else {
                UpdateDecision::RetryFresh
            }
        },
    }
}

/// Two concurrent updates of the same key, both taken from the same initial
/// snapshot, leave exactly one of the two values persisted — never a merge,
/// never a silent drop.  The conditional swap admits only one of the writers
/// first; the loser's stale commit is refused (`lemma_bump_changes_version`),
/// and its retry from a fresh snapshot commits on top.  Whichever order the
/// commits land in, the key holds the value of the later commit — one of the
/// two — and every other key is exactly as in the initial table, so both
/// calls terminate after at most one retry and neither edit vanishes.
pub proof fn lemma_concurrent_updates_one_wins(
    m: SettingsEntries,
    k: Seq<char>,
    v1: SettingsValueView,
    v2: SettingsValueView,
)
    ensures
        assoc_get(assoc_set(assoc_set(m, k, v1), k, v2), k) == Some(v2),
        assoc_get(assoc_set(assoc_set(m, k, v2), k, v1), k) == Some(v1),
        forall|k2: Seq<char>|
            k2 != k ==> assoc_get(assoc_set(assoc_set(m, k, v1), k, v2), k2) == assoc_get(m, k2),
        forall|k2: Seq<char>|
            k2 != k ==> assoc_get(assoc_set(assoc_set(m, k, v2), k, v1), k2) == assoc_get(m, k2),
{
    lemma_assoc_get_set_same(assoc_set(m, k, v1), k, v2);
    lemma_assoc_get_set_same(assoc_set(m, k, v2), k, v1);
    assert forall|k2: Seq<char>| k2 != k implies assoc_get(
        assoc_set(assoc_set(m, k, v1), k, v2),
        k2,
    ) == assoc_get(m, k2) by {
        lemma_assoc_get_set_other(assoc_set(m, k, v1), k, v2, k2);
        lemma_assoc_get_set_other(m, k, v1, k2);
    }
    assert forall|k2: Seq<char>| k2 != k implies assoc_get(
        assoc_set(assoc_set(m, k, v2), k, v1),
        k2,
    ) == assoc_get(m, k2) by {
        lemma_assoc_get_set_other(assoc_set(m, k, v2), k, v1, k2);
        lemma_assoc_get_set_other(m, k, v2, k2);
    }
}

} // verus!
