//! The named-profile store's compute half: profile file naming, the listing
//! derived from the profile directory (JSON files only, suffix stripped,
//! sorted), and the default configuration. Reading and writing the files is
//! the boundary layer's work.

use crate::models::RobloxConfig;
use crate::text::{
    ends_with_seq, lemma_lex_le_total, lemma_lex_le_transitive, lex_le, str_ends_with, str_le,
};
use vstd::multiset::Multiset;
use vstd::prelude::*;

verus! {

/// The profile store and its directories.
pub struct ConfigManager {
    pub config_dir: String,
    pub profiles_dir: String,
}

/// Sorted oldest-first: each name is lexicographically no less than any
/// name before it.
pub open spec fn sorted_ascending(v: Seq<Seq<char>>) -> bool {
    forall|i: int, j: int| 0 <= i < j < v.len() ==> lex_le(#[trigger] v[i], #[trigger] v[j])
}

/// A listing entry's name with its `.json` suffix stripped.
pub open spec fn stripped(s: Seq<char>) -> Seq<char> {
    s.subrange(0, s.len() - 5)
}

/// The views of a name list.
pub open spec fn profile_names_view(v: Seq<String>) -> Seq<Seq<char>> {
    v.map_values(|s: String| s@)
}

impl ConfigManager {
    /// The store rooted at the directories the boundary layer resolved.
    pub fn new(config_dir: String, profiles_dir: String) -> (r: ConfigManager)
        ensures
            r.config_dir@ == config_dir@,
            r.profiles_dir@ == profiles_dir@,
    {
        ConfigManager { config_dir, profiles_dir }
    }

    /// The file name a named profile is stored under.
    pub fn profile_file_name(&self, name: &str) -> (r: String)
        ensures
            r@ == name@ + ".json"@,
    {
        let mut s = name.to_owned();
        s.append(".json");
        s
    }

    /// The documented default configuration.
    pub fn get_default_config(&self) -> (r: RobloxConfig)
        ensures
            r.graphics.graphics_quality == 10,
            r.rendering.frame_rate_limit == Some(60u32),
            r.performance.low_latency_mode == false,
            r.custom_flags@.len() == 0,
    {
        RobloxConfig::default()
    }

    /// The profile names of a directory listing: exactly the `.json` entries
    /// with the suffix stripped, sorted ascending.
    pub fn list_profiles(&self, entries: &Vec<String>) -> (r: Vec<String>)
        ensures
            sorted_ascending(profile_names_view(r@)),
            profile_names_view(r@).to_multiset() == profile_names_view(entries@).filter(
                |s: Seq<char>| ends_with_seq(s, ".json"@),
            ).map_values(|s: Seq<char>| stripped(s)).to_multiset(),
    {
        broadcast use vstd::seq_lib::group_seq_properties;
        broadcast use vstd::seq_lib::group_filter_ensures;
        broadcast use vstd::seq_lib::group_to_multiset_ensures;

        let mut kept: Vec<String> = Vec::new();
        let mut i: usize = 0;
        proof {
            assert(profile_names_view(entries@.subrange(0, 0)) =~= Seq::<Seq<char>>::empty());
            assert(profile_names_view(kept@) =~= profile_names_view(entries@.subrange(0, 0)).filter(
                |s: Seq<char>| ends_with_seq(s, ".json"@),
            ).map_values(|s: Seq<char>| stripped(s)));
        }
        while i < entries.len()
            invariant
                i <= entries@.len(),
                profile_names_view(kept@) == profile_names_view(entries@.subrange(0, i as int))
                    .filter(|s: Seq<char>| ends_with_seq(s, ".json"@)).map_values(
                    |s: Seq<char>| stripped(s),
                ),
            decreases entries@.len() - i,
        {
            let e = &entries[i];
            let ghost prev = kept@;
            let ghost nsub = profile_names_view(entries@.subrange(0, i as int));
            let ghost nsub1 = profile_names_view(entries@.subrange(0, i as int + 1));
            proof {
                assert(nsub1 =~= nsub.push(entries@[i as int]@));
                nsub.lemma_filter_push(entries@[i as int]@, |s: Seq<char>| ends_with_seq(s, ".json"@));
            }
            if str_ends_with(e.as_str(), ".json") {
                let el = e.as_str().unicode_len();
                proof {
                    reveal_strlit(".json");
                }
                let stem = e.as_str().substring_char(0, el - 5).to_owned();
                kept.push(stem);
                proof {
                    assert(profile_names_view(kept@) =~= profile_names_view(prev).push(
                        stripped(entries@[i as int]@),
                    ));
                    assert(profile_names_view(kept@) =~~= nsub1.filter(
                        |s: Seq<char>| ends_with_seq(s, ".json"@),
                    ).map_values(|s: Seq<char>| stripped(s)));
                }
            } else {
                proof {
                    assert(profile_names_view(kept@) =~~= nsub1.filter(
                        |s: Seq<char>| ends_with_seq(s, ".json"@),
                    ).map_values(|s: Seq<char>| stripped(s)));
                }
            }
            i += 1;
        }
        proof {
            assert(entries@.subrange(0, entries@.len() as int) =~= entries@);
        }
        // Selection sort, oldest first: repeatedly move a least remaining
        // name to the output.
        let ghost kept_names = profile_names_view(kept@);
        let mut out: Vec<String> = Vec::new();
        proof {
            assert(profile_names_view(out@) =~= Seq::<Seq<char>>::empty());
            assert(profile_names_view(out@).to_multiset().add(
                profile_names_view(kept@).to_multiset(),
            ) =~= kept_names.to_multiset());
        }
        while kept.len() > 0
            invariant
                profile_names_view(out@).to_multiset().add(
                    profile_names_view(kept@).to_multiset(),
                ) == kept_names.to_multiset(),
                sorted_ascending(profile_names_view(out@)),
                forall|a: int, b: int|
                    0 <= a < out@.len() && 0 <= b < kept@.len() ==> lex_le(
                        #[trigger] out@[a]@,
                        #[trigger] kept@[b]@,
                    ),
            decreases kept@.len(),
        {
            broadcast use vstd::seq_lib::group_to_multiset_ensures;

            let m = min_index(&kept);
            let ghost prev_out = out@;
            let ghost prev_kept = kept@;
            let name = kept.remove(m);
            out.push(name);
            proof {
                assert(profile_names_view(out@) =~= profile_names_view(prev_out).push(
                    prev_kept[m as int]@,
                ));
                assert(profile_names_view(kept@) =~= profile_names_view(prev_kept).remove(
                    m as int,
                ));
                assert(profile_names_view(prev_kept).remove(m as int).to_multiset()
                    =~= profile_names_view(prev_kept).to_multiset().remove(
                    profile_names_view(prev_kept)[m as int],
                ));
                assert(profile_names_view(prev_kept)[m as int] == prev_kept[m as int]@);
                assert(profile_names_view(out@).to_multiset() =~= profile_names_view(
                    prev_out,
                ).to_multiset().insert(prev_kept[m as int]@));
                assert(profile_names_view(out@).to_multiset().add(
                    profile_names_view(kept@).to_multiset(),
                ) =~= kept_names.to_multiset());
                assert(sorted_ascending(profile_names_view(out@))) by {
                    assert forall|a: int, b: int|
                        0 <= a < b < profile_names_view(out@).len() implies lex_le(
                        profile_names_view(out@)[a],
                        profile_names_view(out@)[b],
                    ) by {
                        if b < profile_names_view(out@).len() - 1 {
                            assert(profile_names_view(prev_out)[a] == prev_out[a]@);
                            assert(profile_names_view(prev_out)[b] == prev_out[b]@);
                            assert(lex_le(
                                profile_names_view(prev_out)[a],
                                profile_names_view(prev_out)[b],
                            ));
                        } else {
                            assert(profile_names_view(out@)[b] == prev_kept[m as int]@);
                            assert(lex_le(prev_out[a]@, prev_kept[m as int]@));
                        }
                    }
                }
                assert forall|a: int, b: int|
                    0 <= a < out@.len() && 0 <= b < kept@.len() implies lex_le(
                    #[trigger] out@[a]@,
                    #[trigger] kept@[b]@,
                ) by {
                    let orig: int = if b < m {
                        b
                    } else {
                        b + 1
                    };
                    assert(kept@[b] == prev_kept[orig]);
                    if a < out@.len() - 1 {
                        assert(lex_le(prev_out[a]@, prev_kept[orig]@));
                    } else {
                        assert(out@[a] == prev_kept[m as int]);
                        assert(lex_le(prev_kept[m as int]@, prev_kept[orig]@));
                    }
                }
            }
        }
        proof {
            assert(profile_names_view(kept@) =~= Seq::<Seq<char>>::empty());
            assert(profile_names_view(kept@).to_multiset() =~= Multiset::<Seq<char>>::empty());
            assert(profile_names_view(out@).to_multiset() =~= kept_names.to_multiset());
        }
        out
    }
}

/// The index of a lexicographically least element.
fn min_index(v: &Vec<String>) -> (r: usize)
    requires
        v@.len() > 0,
    ensures
        r < v@.len(),
        forall|j: int| 0 <= j < v@.len() ==> lex_le(v@[r as int]@, #[trigger] v@[j]@),
{
    let mut best: usize = 0;
    let mut j: usize = 1;
    proof {
        lemma_lex_le_total(v@[0]@, v@[0]@);
    }
    while j < v.len()
        invariant
            1 <= j <= v@.len(),
            best < j,
            forall|k: int| 0 <= k < j ==> lex_le(v@[best as int]@, #[trigger] v@[k]@),
        decreases v@.len() - j,
    {
        if str_le(v[j].as_str(), v[best].as_str()) {
            proof {
                assert forall|k: int| 0 <= k < j + 1 implies lex_le(
                    v@[j as int]@,
                    #[trigger] v@[k]@,
                ) by {
                    if k < j {
                        lemma_lex_le_transitive(v@[j as int]@, v@[best as int]@, v@[k]@);
                    } else {
                        lemma_lex_le_total(v@[j as int]@, v@[j as int]@);
                    }
                }
            }
            best = j;
        } else {
            proof {
                lemma_lex_le_total(v@[j as int]@, v@[best as int]@);
            }
        }
        j += 1;
    }
    best
}

} // verus!
