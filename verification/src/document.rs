//! The settings document: an unordered string-keyed collection of scalar
//! values, the logical content of the client's settings file. The one
//! operation that matters is the key-by-key merge: new keys inserted,
//! touched keys overwritten, untouched keys preserved byte for byte.

use crate::scalar::{wf_scalar, ScalarSpec, ScalarValue};
use crate::text::str_eq;
use vstd::prelude::*;

verus! {

/// The keys of an entry sequence, in order.
pub open spec fn entry_keys(s: Seq<(String, ScalarValue)>) -> Seq<Seq<char>> {
    s.map_values(|p: (String, ScalarValue)| p.0@)
}

/// The views of an entry sequence, in order.
pub open spec fn entry_views(s: Seq<(String, ScalarValue)>) -> Seq<(Seq<char>, ScalarSpec)> {
    s.map_values(|p: (String, ScalarValue)| (p.0@, p.1@))
}

/// The mapping an entry sequence denotes; a later entry for the same key
/// wins, as in a JSON object read left to right.
pub open spec fn entries_map(s: Seq<(String, ScalarValue)>) -> Map<Seq<char>, ScalarSpec>
    decreases s.len(),
{
    if s.len() == 0 {
        Map::empty()
    } else {
        entries_map(s.drop_last()).insert(s.last().0@, s.last().1@)
    }
}

/// The domain of the denoted mapping is exactly the key set.
pub proof fn lemma_entries_map_dom(s: Seq<(String, ScalarValue)>)
    ensures
        entries_map(s).dom() == entry_keys(s).to_set(),
    decreases s.len(),
{
    if s.len() == 0 {
        assert(entry_keys(s).to_set() =~= Set::<Seq<char>>::empty());
        assert(entries_map(s).dom() =~= Set::<Seq<char>>::empty());
    } else {
        lemma_entries_map_dom(s.drop_last());
        assert(entry_keys(s).drop_last() =~= entry_keys(s.drop_last()));
        assert(entry_keys(s) =~= entry_keys(s.drop_last()).push(s.last().0@));
        assert(entry_keys(s).to_set() =~= entry_keys(s.drop_last()).to_set().insert(s.last().0@))
            by {
            let ks = entry_keys(s);
            assert forall|k: Seq<char>| ks.to_set().contains(k) implies ks.drop_last()
                .to_set()
                .insert(s.last().0@)
                .contains(k) by {
                let i = choose|i: int| 0 <= i < ks.len() && ks[i] == k;
                if i < ks.len() - 1 {
                    assert(ks.drop_last()[i] == k);
                }
            }
            assert forall|k: Seq<char>|
                ks.drop_last().to_set().insert(s.last().0@).contains(k) implies ks.to_set()
                .contains(k) by {
                if ks.drop_last().to_set().contains(k) {
                    let i = choose|i: int| 0 <= i < ks.drop_last().len() && ks.drop_last()[i] == k;
                    assert(ks[i] == k);
                } else {
                    assert(ks[ks.len() - 1] == k);
                }
            }
        }
        assert(entries_map(s).dom() =~= entries_map(s.drop_last()).dom().insert(s.last().0@));
    }
}

/// A settings document. The physical file is a JSON object; the logical
/// content is this unordered mapping, held as an entry list with distinct
/// keys.
pub struct SettingsDoc {
    pub entries: Vec<(String, ScalarValue)>,
}

impl SettingsDoc {
    /// The mapping this document denotes.
    pub open spec fn as_map(self) -> Map<Seq<char>, ScalarSpec> {
        entries_map(self.entries@)
    }

    /// The keys, in entry order.
    pub open spec fn keys(self) -> Seq<Seq<char>> {
        entry_keys(self.entries@)
    }

    /// Structural invariant: no key occurs twice.
    pub open spec fn keys_unique(self) -> bool {
        self.keys().no_duplicates()
    }

    /// Every stored value is well-formed (numbers hold canonical text).
    pub open spec fn values_wf(self) -> bool {
        forall|i: int|
            0 <= i < self.entries@.len() ==> wf_scalar(#[trigger] self.entries@[i].1@)
    }

    /// The empty document, the starting point when the file is absent or
    /// unreadable.
    pub fn empty() -> (r: SettingsDoc)
        ensures
            r.as_map() == Map::<Seq<char>, ScalarSpec>::empty(),
            r.keys_unique(),
            r.values_wf(),
            r.entries@.len() == 0,
    {
        SettingsDoc { entries: Vec::new() }
    }

    /// Whether some entry carries this key.
    pub fn has_key(&self, key: &str) -> (r: bool)
        ensures
            r == self.keys().contains(key@),
    {
        let mut i: usize = 0;
        while i < self.entries.len()
            invariant
                i <= self.entries@.len(),
                forall|j: int| 0 <= j < i ==> #[trigger] self.entries@[j].0@ != key@,
            decreases self.entries@.len() - i,
        {
            if str_eq(self.entries[i].0.as_str(), key) {
                assert(self.keys()[i as int] == key@);
                return true;
            }
            i += 1;
        }
        proof {
            if self.keys().contains(key@) {
                let j = choose|j: int| 0 <= j < self.keys().len() && self.keys()[j] == key@;
                assert(self.entries@[j].0@ == key@);
            }
        }
        false
    }

    /// The stored value under a key, if any.
    pub fn lookup(&self, key: &str) -> (r: Option<&ScalarValue>)
        requires
            self.keys_unique(),
        ensures
            match r {
                Some(v) => self.as_map().dom().contains(key@) && v@ == self.as_map()[key@],
                None => !self.as_map().dom().contains(key@),
            },
    {
        proof {
            lemma_entries_map_dom(self.entries@);
        }
        let mut i: usize = 0;
        while i < self.entries.len()
            invariant
                i <= self.entries@.len(),
                self.keys_unique(),
                forall|j: int| 0 <= j < i ==> #[trigger] self.entries@[j].0@ != key@,
            decreases self.entries@.len() - i,
        {
            if str_eq(self.entries[i].0.as_str(), key) {
                proof {
                    assert(self.keys()[i as int] == key@);
                    assert(entry_keys(self.entries@).no_duplicates());
                    lemma_entries_map_unique_at(self.entries@, i as int);
                }
                return Some(&self.entries[i].1);
            }
            i += 1;
        }
        proof {
            if self.as_map().dom().contains(key@) {
                let j = choose|j: int| 0 <= j < self.keys().len() && self.keys()[j] == key@;
                assert(self.entries@[j].0@ == key@);
            }
        }
        None
    }

    /// An explicit deep copy.
    pub fn dup(&self) -> (r: SettingsDoc)
        ensures
            r.entries@.len() == self.entries@.len(),
            forall|i: int|
                0 <= i < self.entries@.len() ==> #[trigger] r.entries@[i].0@
                    == self.entries@[i].0@ && r.entries@[i].1@ == self.entries@[i].1@,
            r.as_map() == self.as_map(),
            r.keys() == self.keys(),
            r.keys_unique() == self.keys_unique(),
            self.values_wf() ==> r.values_wf(),
    {
        let mut out: Vec<(String, ScalarValue)> = Vec::new();
        let mut i: usize = 0;
        while i < self.entries.len()
            invariant
                i <= self.entries@.len(),
                out@.len() == i,
                forall|j: int|
                    0 <= j < i ==> #[trigger] out@[j].0@ == self.entries@[j].0@ && out@[j].1@
                        == self.entries@[j].1@,
            decreases self.entries@.len() - i,
        {
            let e = &self.entries[i];
            out.push((e.0.clone(), e.1.dup()));
            i += 1;
        }
        proof {
            lemma_entries_map_congruent(out@, self.entries@);
            assert(entry_keys(out@) =~= entry_keys(self.entries@));
            assert(self.values_wf() ==> (forall|k: int|
                0 <= k < out@.len() ==> wf_scalar(#[trigger] out@[k].1@))) by {
                if self.values_wf() {
                    assert forall|k: int|
                        0 <= k < out@.len() implies wf_scalar(#[trigger] out@[k].1@) by {
                        assert(out@[k].0@ =~= self.entries@[k].0@);
                        assert(out@[k].1@ == self.entries@[k].1@);
                        assert(wf_scalar(self.entries@[k].1@));
                    }
                }
            }
        }
        SettingsDoc { entries: out }
    }

    /// The merge of `partial` onto `self`: untouched keys keep their value,
    /// touched keys take the partial document's value, new keys are
    /// inserted. This is the read-modify-write core of the settings store.
    pub fn merged_with(&self, partial: &SettingsDoc) -> (r: SettingsDoc)
        requires
            self.keys_unique(),
            partial.keys_unique(),
        ensures
            r.as_map() == self.as_map().union_prefer_right(partial.as_map()),
            r.keys_unique(),
            self.values_wf() && partial.values_wf() ==> r.values_wf(),
    {
        let ghost pkeys = entry_keys(partial.entries@).to_set();
        let mut out: Vec<(String, ScalarValue)> = Vec::new();
        let mut i: usize = 0;
        proof {
            lemma_entries_map_dom(partial.entries@);
            assert(entries_map(out@) =~= entries_map(
                self.entries@.subrange(0, 0),
            ).remove_keys(pkeys)) by {
                assert(self.entries@.subrange(0, 0) =~= Seq::<(String, ScalarValue)>::empty());
            }
        }
        while i < self.entries.len()
            invariant
                i <= self.entries@.len(),
                self.keys_unique(),
                pkeys == entry_keys(partial.entries@).to_set(),
                entries_map(out@) == entries_map(self.entries@.subrange(0, i as int)).remove_keys(
                    pkeys,
                ),
                entry_keys(out@).no_duplicates(),
                forall|j: int| 0 <= j < out@.len() ==> !pkeys.contains(#[trigger] out@[j].0@),
                forall|j: int|
                    0 <= j < out@.len() ==> entry_keys(self.entries@.subrange(0, i as int))
                        .contains(#[trigger] out@[j].0@),
                self.values_wf() ==> forall|j: int|
                    0 <= j < out@.len() ==> wf_scalar(#[trigger] out@[j].1@),
            decreases self.entries@.len() - i,
        {
            let e = &self.entries[i];
            let ghost prev = out@;
            let ghost sub_i = self.entries@.subrange(0, i as int);
            let ghost sub_i1 = self.entries@.subrange(0, i as int + 1);
            proof {
                assert(sub_i1.drop_last() =~= sub_i);
                assert(sub_i1.last() == self.entries@[i as int]);
            }
            if !partial.has_key(e.0.as_str()) {
                proof {
                    assert(!pkeys.contains(e.0@)) by {
                        if pkeys.contains(e.0@) {
                            assert(entry_keys(partial.entries@).contains(e.0@));
                        }
                        if entry_keys(partial.entries@).contains(e.0@) {
                            assert(pkeys.contains(e.0@));
                        }
                    }
                }
                out.push((e.0.clone(), e.1.dup()));
                proof {
                    assert(out@.drop_last() =~= prev);
                    assert(entries_map(out@) == entries_map(prev).insert(e.0@, e.1@));
                    assert(entries_map(out@) =~= entries_map(sub_i1).remove_keys(pkeys));
                    assert(entry_keys(out@).drop_last() =~= entry_keys(prev));
                    assert(entry_keys(out@).last() == e.0@);
                    assert(entry_keys(out@).no_duplicates()) by {
                        // The key just appended is drawn from a strict prefix
                        // of a duplicate-free key list, so it is new to `out`.
                        assert forall|m: int| 0 <= m < entry_keys(prev).len() implies #[trigger]
                        entry_keys(prev)[m] != e.0@ by {
                            assert(entry_keys(sub_i).contains(prev[m].0@));
                            let w = choose|w: int|
                                0 <= w < sub_i.len() && entry_keys(sub_i)[w] == prev[m].0@;
                            assert(self.keys()[w] == prev[m].0@);
                            assert(self.keys()[i as int] == e.0@);
                        }
                        assert(entry_keys(out@) =~= entry_keys(prev).push(e.0@));
                        lemma_keys_push_no_dup(entry_keys(prev), e.0@);
                    }
                    assert forall|j: int|
                        0 <= j < out@.len() implies entry_keys(sub_i1).contains(
                        #[trigger] out@[j].0@,
                    ) by {
                        if j < out@.len() - 1 {
                            assert(entry_keys(sub_i).contains(out@[j].0@));
                            let m = choose|m: int|
                                0 <= m < sub_i.len() && entry_keys(sub_i)[m] == out@[j].0@;
                            assert(entry_keys(sub_i1)[m] == out@[j].0@);
                        } else {
                            assert(entry_keys(sub_i1)[i as int] == out@[j].0@);
                        }
                    }
                }
            } else {
                proof {
                    assert(pkeys.contains(e.0@)) by {
                        assert(entry_keys(partial.entries@).contains(e.0@));
                    }
                    assert(entries_map(out@) =~= entries_map(sub_i1).remove_keys(pkeys));
                    assert forall|j: int|
                        0 <= j < out@.len() implies entry_keys(sub_i1).contains(
                        #[trigger] out@[j].0@,
                    ) by {
                        assert(entry_keys(sub_i).contains(out@[j].0@));
                        let m = choose|m: int|
                            0 <= m < sub_i.len() && entry_keys(sub_i)[m] == out@[j].0@;
                        assert(entry_keys(sub_i1)[m] == out@[j].0@);
                    }
                }
            }
            i += 1;
        }
        let ghost base_filtered = entries_map(self.entries@).remove_keys(pkeys);
        proof {
            assert(self.entries@.subrange(0, self.entries@.len() as int) =~= self.entries@);
        }
        // Append every entry of the partial document; its keys are distinct
        // and none of them is left in `out`.
        let mut j: usize = 0;
        while j < partial.entries.len()
            invariant
                j <= partial.entries@.len(),
                partial.keys_unique(),
                pkeys == entry_keys(partial.entries@).to_set(),
                entries_map(out@) == base_filtered.union_prefer_right(
                    entries_map(partial.entries@.subrange(0, j as int)),
                ),
                entry_keys(out@).no_duplicates(),
                forall|m: int|
                    0 <= m < out@.len() ==> (!pkeys.contains(#[trigger] out@[m].0@)
                        || entry_keys(partial.entries@.subrange(0, j as int)).contains(
                        out@[m].0@,
                    )),
                (self.values_wf() && partial.values_wf()) ==> forall|m: int|
                    0 <= m < out@.len() ==> wf_scalar(#[trigger] out@[m].1@),
            decreases partial.entries@.len() - j,
        {
            let e = &partial.entries[j];
            let ghost prev = out@;
            let ghost psub_j = partial.entries@.subrange(0, j as int);
            let ghost psub_j1 = partial.entries@.subrange(0, j as int + 1);
            proof {
                assert(psub_j1.drop_last() =~= psub_j);
                assert(psub_j1.last() == partial.entries@[j as int]);
                assert(!entry_keys(psub_j).contains(e.0@)) by {
                    if entry_keys(psub_j).contains(e.0@) {
                        let m = choose|m: int|
                            0 <= m < psub_j.len() && entry_keys(psub_j)[m] == e.0@;
                        assert(entry_keys(partial.entries@)[m] == e.0@);
                        assert(entry_keys(partial.entries@)[j as int] == e.0@);
                    }
                }
                assert(forall|m: int| 0 <= m < prev.len() ==> #[trigger] prev[m].0@ != e.0@) by {
                    assert forall|m: int| 0 <= m < prev.len() implies #[trigger] prev[m].0@ != e.0@
                        by {
                        assert(entry_keys(partial.entries@)[j as int] == e.0@);
                        assert(pkeys.contains(e.0@));
                    }
                }
            }
            out.push((e.0.clone(), e.1.dup()));
            proof {
                assert(out@.drop_last() =~= prev);
                assert(entries_map(out@) == entries_map(prev).insert(e.0@, e.1@));
                assert(entries_map(psub_j1) == entries_map(psub_j).insert(e.0@, e.1@));
                assert(entries_map(out@) =~= base_filtered.union_prefer_right(
                    entries_map(psub_j1),
                ));
                assert(entry_keys(out@).drop_last() =~= entry_keys(prev));
                assert(entry_keys(out@).last() == e.0@);
                assert(forall|m: int|
                    0 <= m < entry_keys(prev).len() ==> #[trigger] entry_keys(prev)[m] != e.0@);
                assert(entry_keys(out@) =~= entry_keys(prev).push(e.0@));
                lemma_keys_push_no_dup(entry_keys(prev), e.0@);
                assert forall|m: int| 0 <= m < out@.len() implies (!pkeys.contains(
                    #[trigger] out@[m].0@,
                ) || entry_keys(psub_j1).contains(out@[m].0@)) by {
                    if m < out@.len() - 1 {
                        if entry_keys(psub_j).contains(out@[m].0@) {
                            let w = choose|w: int|
                                0 <= w < psub_j.len() && entry_keys(psub_j)[w] == out@[m].0@;
                            assert(entry_keys(psub_j1)[w] == out@[m].0@);
                        }
                    } else {
                        assert(entry_keys(psub_j1)[j as int] == out@[m].0@);
                    }
                }
            }
            j += 1;
        }
        proof {
            assert(partial.entries@.subrange(0, partial.entries@.len() as int)
                =~= partial.entries@);
            lemma_entries_map_dom(partial.entries@);
            assert(entries_map(out@) =~= entries_map(self.entries@).union_prefer_right(
                entries_map(partial.entries@),
            )) by {
                let bm = entries_map(self.entries@);
                let pm = entries_map(partial.entries@);
                assert forall|k: Seq<char>|
                    base_filtered.union_prefer_right(pm).dom().contains(k)
                        == bm.union_prefer_right(pm).dom().contains(k) by {}
            }
        }
        SettingsDoc { entries: out }
    }
}

impl SettingsDoc {
    /// The document with one key inserted or overwritten.
    pub fn with_entry(&self, key: &str, v: ScalarValue) -> (r: SettingsDoc)
        requires
            self.keys_unique(),
        ensures
            r.as_map() == self.as_map().insert(key@, v@),
            r.keys_unique(),
            self.values_wf() && wf_scalar(v@) ==> r.values_wf(),
    {
        let mut entries: Vec<(String, ScalarValue)> = Vec::new();
        entries.push((key.to_owned(), v));
        let single = SettingsDoc { entries };
        proof {
            assert(single.entries@.drop_last() =~= Seq::<(String, ScalarValue)>::empty());
            assert(entries_map(Seq::<(String, ScalarValue)>::empty())
                == Map::<Seq<char>, ScalarSpec>::empty());
            assert(single.entries@.last() == single.entries@[0]);
            assert(single.entries@[0].0@ == key@);
            assert(single.as_map() == entries_map(single.entries@.drop_last()).insert(
                single.entries@.last().0@,
                single.entries@.last().1@,
            ));
            assert(single.as_map() =~= Map::<Seq<char>, ScalarSpec>::empty().insert(
                key@,
                single.entries@[0].1@,
            ));
            assert(single.keys_unique());
            assert(single.values_wf() == wf_scalar(single.entries@[0].1@)) by {
                if wf_scalar(single.entries@[0].1@) {
                    assert(forall|i: int|
                        0 <= i < single.entries@.len() ==> wf_scalar(
                            #[trigger] single.entries@[i].1@,
                        ));
                }
            }
        }
        let r = self.merged_with(&single);
        proof {
            assert(r.as_map() =~= self.as_map().insert(key@, v@));
        }
        r
    }
}

/// Appending a fresh key keeps a key list duplicate-free.
pub proof fn lemma_keys_push_no_dup(ks: Seq<Seq<char>>, k: Seq<char>)
    requires
        ks.no_duplicates(),
        forall|m: int| 0 <= m < ks.len() ==> ks[m] != k,
    ensures
        ks.push(k).no_duplicates(),
{
    let p = ks.push(k);
    assert forall|x: int, y: int|
        0 <= x < p.len() && 0 <= y < p.len() && x != y implies p[x] != p[y] by {
        if x < ks.len() && y < ks.len() {
            assert(p[x] == ks[x]);
            assert(p[y] == ks[y]);
        } else if x < ks.len() {
            assert(p[x] == ks[x]);
            assert(p[y] == k);
        } else {
            assert(p[x] == k);
            assert(p[y] == ks[y]);
        }
    }
}

/// With distinct keys, the entry at any index gives the mapping's value.
pub proof fn lemma_entries_map_unique_at(s: Seq<(String, ScalarValue)>, i: int)
    requires
        entry_keys(s).no_duplicates(),
        0 <= i < s.len(),
    ensures
        entries_map(s).dom().contains(s[i].0@),
        entries_map(s)[s[i].0@] == s[i].1@,
    decreases s.len(),
{
    if i == s.len() - 1 {
    } else {
        assert(entry_keys(s).drop_last() =~= entry_keys(s.drop_last()));
        assert(entry_keys(s.drop_last()).no_duplicates()) by {
            assert(forall|a: int, b: int|
                0 <= a < b < entry_keys(s.drop_last()).len() ==> entry_keys(s)[a]
                    == entry_keys(s.drop_last())[a] && entry_keys(s)[b] == entry_keys(
                    s.drop_last(),
                )[b]);
        }
        lemma_entries_map_unique_at(s.drop_last(), i);
        assert(s.drop_last()[i] == s[i]);
        assert(entry_keys(s)[i] == s[i].0@);
        assert(entry_keys(s)[s.len() - 1] == s.last().0@);
        assert(s[i].0@ != s.last().0@);
    }
}

/// Two entry sequences with pairwise equal views denote the same mapping.
pub proof fn lemma_entries_map_congruent(a: Seq<(String, ScalarValue)>, b: Seq<(String, ScalarValue)>)
    requires
        a.len() == b.len(),
        forall|i: int|
            0 <= i < a.len() ==> #[trigger] a[i].0@ == b[i].0@ && a[i].1@ == b[i].1@,
    ensures
        entries_map(a) == entries_map(b),
        entry_keys(a) == entry_keys(b),
    decreases a.len(),
{
    assert(entry_keys(a) =~= entry_keys(b));
    if a.len() > 0 {
        lemma_entries_map_congruent(a.drop_last(), b.drop_last());
        assert(entries_map(a) =~= entries_map(b));
    } else {
        assert(entries_map(a) =~= entries_map(b));
    }
}

/// Merge preserves untouched keys: a key only in the base document keeps its
/// value; a key of the partial document takes the partial document's value;
/// no key disappears and none appears from nowhere.
pub proof fn lemma_merge_preserves_untouched(
    base: Map<Seq<char>, ScalarSpec>,
    partial: Map<Seq<char>, ScalarSpec>,
    k: Seq<char>,
)
    ensures
        base.dom().contains(k) && !partial.dom().contains(k) ==> base.union_prefer_right(
            partial,
        ).dom().contains(k) && base.union_prefer_right(partial)[k] == base[k],
        partial.dom().contains(k) ==> base.union_prefer_right(partial).dom().contains(k)
            && base.union_prefer_right(partial)[k] == partial[k],
        base.union_prefer_right(partial).dom() == base.dom().union(partial.dom()),
{
    assert(base.union_prefer_right(partial).dom() =~= base.dom().union(partial.dom()));
}

/// Applying the same partial document twice yields the same document as
/// applying it once.
pub proof fn lemma_merge_idempotent(
    base: Map<Seq<char>, ScalarSpec>,
    partial: Map<Seq<char>, ScalarSpec>,
)
    ensures
        base.union_prefer_right(partial).union_prefer_right(partial) == base.union_prefer_right(
            partial,
        ),
{
    assert(base.union_prefer_right(partial).union_prefer_right(partial)
        =~= base.union_prefer_right(partial));
}

} // verus!
