//! The backup ledger: snapshot naming, the ordered listing of snapshots,
//! restore selection, and the byte-for-byte content transfer of snapshot
//! and restore. Snapshots are append-only whole-file copies named by a
//! sortable timestamp; the boundary layer copies the bytes, lists the
//! backup directory, and hands the names in.

use crate::text::{
    ends_with_seq, lemma_lex_le_total, lemma_lex_le_transitive, lex_le, str_ends_with, str_eq,
    str_le,
};
use crate::SettingsError;
use vstd::multiset::Multiset;
use vstd::prelude::*;

verus! {

/// The file name of a snapshot taken at the given timestamp.
pub fn backup_file_name(timestamp: &str) -> (r: String)
    ensures
        r@ == "backup_"@ + timestamp@ + ".json"@,
{
    let mut s = "backup_".to_owned();
    s.append(timestamp);
    s.append(".json");
    s
}

/// The snapshot to take now: its file name, or nothing when the live file
/// does not exist — then there is nothing to protect and the operation is a
/// no-op success, not an error.
pub fn snapshot_plan(live_exists: bool, timestamp: &str) -> (r: Option<String>)
    ensures
        match r {
            Some(n) => live_exists && n@ == "backup_"@ + timestamp@ + ".json"@,
            None => !live_exists,
        },
{
    if live_exists {
        Some(backup_file_name(timestamp))
    } else {
        None
    }
}

/// The bytes a snapshot stores: exactly the live file's current text.
pub fn snapshot_content(live: &str) -> (r: String)
    ensures
        r@ == live@,
{
    live.to_owned()
}

/// The bytes a restore writes back over the live file: exactly the stored
/// snapshot, replacing the whole file — a restore is not a merge.
pub fn restore_content(snapshot: &str) -> (r: String)
    ensures
        r@ == snapshot@,
{
    snapshot.to_owned()
}

/// Backup followed by restore is a strict inverse of doing nothing: with no
/// intervening write, the restored file is byte-identical to the file the
/// snapshot was taken of.
pub proof fn lemma_snapshot_restore_inverse(live: Seq<char>, snap: Seq<char>, restored: Seq<char>)
    requires
        snap == live,
        restored == snap,
    ensures
        restored == live,
{
}

/// Pick the snapshot to restore: the named backup must exist; a missing
/// name fails hard with `NotFound`, never a silent fallback.
pub fn restore_plan(requested: &str, available: &Vec<String>) -> (r: Result<usize, SettingsError>)
    ensures
        match r {
            Ok(i) => i < available@.len() && available@[i as int]@ == requested@,
            Err(e) => e == SettingsError::NotFound && forall|j: int|
                0 <= j < available@.len() ==> #[trigger] available@[j]@ != requested@,
        },
{
    let mut i: usize = 0;
    while i < available.len()
        invariant
            i <= available@.len(),
            forall|j: int| 0 <= j < i ==> #[trigger] available@[j]@ != requested@,
        decreases available@.len() - i,
    {
        if str_eq(available[i].as_str(), requested) {
            return Ok(i);
        }
        i += 1;
    }
    Err(SettingsError::NotFound)
}

/// The index of a lexicographically greatest element.
fn max_index(v: &Vec<String>) -> (r: usize)
    requires
        v@.len() > 0,
    ensures
        r < v@.len(),
        forall|j: int| 0 <= j < v@.len() ==> lex_le(#[trigger] v@[j]@, v@[r as int]@),
{
    let mut best: usize = 0;
    let mut j: usize = 1;
    proof {
        lemma_lex_le_total(v@[0]@, v@[0]@);
    }
    while j < v.len()
        invariant
            1 <= j <= v@.len(),
            best < j,
            forall|k: int| 0 <= k < j ==> lex_le(#[trigger] v@[k]@, v@[best as int]@),
        decreases v@.len() - j,
    {
        if str_le(v[best].as_str(), v[j].as_str()) {
            proof {
                assert forall|k: int| 0 <= k < j + 1 implies lex_le(
                    #[trigger] v@[k]@,
                    v@[j as int]@,
                ) by {
                    if k < j {
                        lemma_lex_le_transitive(v@[k]@, v@[best as int]@, v@[j as int]@);
                    } else {
                        lemma_lex_le_total(v@[j as int]@, v@[j as int]@);
                    }
                }
            }
            best = j;
        } else {
            proof {
                lemma_lex_le_total(v@[best as int]@, v@[j as int]@);
            }
        }
        j += 1;
    }
    best
}

/// The views of a name list.
pub open spec fn names_view(v: Seq<String>) -> Seq<Seq<char>> {
    v.map_values(|s: String| s@)
}

/// Sorted newest-first: each name is lexicographically no greater than any
/// name before it.
pub open spec fn sorted_descending(v: Seq<Seq<char>>) -> bool {
    forall|i: int, j: int| 0 <= i < j < v.len() ==> lex_le(#[trigger] v[j], #[trigger] v[i])
}

/// List the snapshots of a backup directory: keep the names that follow the
/// snapshot convention (a `.json` file), newest first. No separate index is
/// consulted — the listing alone determines the ledger.
pub fn list_backups(entries: &Vec<String>) -> (r: Vec<String>)
    ensures
        sorted_descending(names_view(r@)),
        forall|i: int| 0 <= i < r@.len() ==> ends_with_seq(#[trigger] r@[i]@, ".json"@),
        names_view(r@).to_multiset() == names_view(entries@).filter(
            |s: Seq<char>| ends_with_seq(s, ".json"@),
        ).to_multiset(),
{
    broadcast use vstd::seq_lib::group_seq_properties;
    broadcast use vstd::seq_lib::group_filter_ensures;
    broadcast use vstd::prelude::Seq::lemma_filter_push;
    broadcast use vstd::seq_lib::group_to_multiset_ensures;

    let mut kept: Vec<String> = Vec::new();
    let mut i: usize = 0;
    proof {
        assert(names_view(kept@) =~= names_view(entries@.subrange(0, 0)).filter(
            |s: Seq<char>| ends_with_seq(s, ".json"@),
        )) by {
            assert(names_view(entries@.subrange(0, 0)) =~= Seq::<Seq<char>>::empty());
        }
    }
    while i < entries.len()
        invariant
            i <= entries@.len(),
            names_view(kept@) == names_view(entries@.subrange(0, i as int)).filter(
                |s: Seq<char>| ends_with_seq(s, ".json"@),
            ),
        decreases entries@.len() - i,
    {
        let e = &entries[i];
        let ghost prev = kept@;
        let ghost nsub = names_view(entries@.subrange(0, i as int));
        let ghost nsub1 = names_view(entries@.subrange(0, i as int + 1));
        proof {
            assert(nsub1 =~= nsub.push(entries@[i as int]@));
        }
        if str_ends_with(e.as_str(), ".json") {
            kept.push(e.clone());
            proof {
                assert(names_view(kept@) =~= names_view(prev).push(e@));
                nsub.lemma_filter_push(
                    entries@[i as int]@,
                    |s: Seq<char>| ends_with_seq(s, ".json"@),
                );
                assert(names_view(kept@) =~= nsub1.filter(
                    |s: Seq<char>| ends_with_seq(s, ".json"@),
                ));
            }
        } else {
            proof {
                nsub.lemma_filter_push(
                    entries@[i as int]@,
                    |s: Seq<char>| ends_with_seq(s, ".json"@),
                );
                assert(names_view(kept@) =~= nsub1.filter(
                    |s: Seq<char>| ends_with_seq(s, ".json"@),
                ));
            }
        }
        i += 1;
    }
    proof {
        assert(entries@.subrange(0, entries@.len() as int) =~= entries@);
        assert forall|a: int| 0 <= a < kept@.len() implies ends_with_seq(
            #[trigger] kept@[a]@,
            ".json"@,
        ) by {
            assert(names_view(kept@)[a] == kept@[a]@);
            names_view(entries@).lemma_filter_pred(|s: Seq<char>| ends_with_seq(s, ".json"@), a);
        }
    }
    // Selection sort, newest first: repeatedly move a greatest remaining
    // name to the output.
    let ghost kept_names = names_view(kept@);
    let mut out: Vec<String> = Vec::new();
    proof {
        broadcast use vstd::seq_lib::group_to_multiset_ensures;

        assert(names_view(out@) =~= Seq::<Seq<char>>::empty());
        assert(names_view(out@).to_multiset().add(names_view(kept@).to_multiset())
            =~= kept_names.to_multiset());
    }
    while kept.len() > 0
        invariant
            names_view(out@).to_multiset().add(names_view(kept@).to_multiset())
                == kept_names.to_multiset(),
            sorted_descending(names_view(out@)),
            forall|a: int, b: int|
                0 <= a < out@.len() && 0 <= b < kept@.len() ==> lex_le(
                    #[trigger] kept@[b]@,
                    #[trigger] out@[a]@,
                ),
            forall|a: int| 0 <= a < out@.len() ==> ends_with_seq(#[trigger] out@[a]@, ".json"@),
            forall|a: int| 0 <= a < kept@.len() ==> ends_with_seq(#[trigger] kept@[a]@, ".json"@),
        decreases kept@.len(),
    {
        broadcast use vstd::seq_lib::group_to_multiset_ensures;

        let m = max_index(&kept);
        let ghost prev_out = out@;
        let ghost prev_kept = kept@;
        let name = kept.remove(m);
        out.push(name);
        proof {
            assert(names_view(out@) =~= names_view(prev_out).push(prev_kept[m as int]@));
            assert(names_view(kept@) =~= names_view(prev_kept).remove(m as int));
            assert(names_view(prev_kept).remove(m as int).to_multiset() =~= names_view(
                prev_kept,
            ).to_multiset().remove(names_view(prev_kept)[m as int]));
            assert(names_view(prev_kept)[m as int] == prev_kept[m as int]@);
            assert(names_view(out@).to_multiset() =~= names_view(prev_out).to_multiset().insert(
                prev_kept[m as int]@,
            ));
            assert(names_view(out@).to_multiset().add(names_view(kept@).to_multiset())
                =~= kept_names.to_multiset());
            assert(sorted_descending(names_view(out@))) by {
                assert forall|a: int, b: int|
                    0 <= a < b < names_view(out@).len() implies lex_le(
                    names_view(out@)[b],
                    names_view(out@)[a],
                ) by {
                    if b < names_view(out@).len() - 1 {
                        assert(names_view(prev_out)[b] == prev_out[b]@);
                        assert(names_view(prev_out)[a] == prev_out[a]@);
                        assert(lex_le(names_view(prev_out)[b], names_view(prev_out)[a]));
                        assert(lex_le(prev_out[b]@, prev_out[a]@));
                    } else {
                        assert(names_view(out@)[b] == prev_kept[m as int]@);
                        assert(lex_le(prev_kept[m as int]@, prev_out[a]@));
                    }
                }
            }
            assert forall|a: int, b: int|
                0 <= a < out@.len() && 0 <= b < kept@.len() implies lex_le(
                #[trigger] kept@[b]@,
                #[trigger] out@[a]@,
            ) by {
                let orig: int = if b < m { b } else { b + 1 };
                assert(kept@[b] == prev_kept[orig]);
                if a < out@.len() - 1 {
                    assert(lex_le(prev_kept[orig]@, prev_out[a]@));
                } else {
                    assert(out@[a] == prev_kept[m as int]);
                    assert(lex_le(prev_kept[orig]@, prev_kept[m as int]@));
                }
            }
            assert forall|a: int| 0 <= a < kept@.len() implies ends_with_seq(
                #[trigger] kept@[a]@,
                ".json"@,
            ) by {
                let orig: int = if a < m { a } else { a + 1 };
                assert(kept@[a] == prev_kept[orig]);
            }
        }
    }
    proof {
        assert(names_view(kept@) =~= Seq::<Seq<char>>::empty());
        assert(names_view(kept@).to_multiset() =~= Multiset::<Seq<char>>::empty());
        assert(names_view(out@).to_multiset() =~= kept_names.to_multiset());
    }
    out
}

} // verus!
