//! Installation discovery and primary selection. The boundary layer walks
//! the search roots (bounded depth, missing roots skipped, a failing root
//! dropped without aborting the others) and hands in one entry per
//! filesystem object seen; deriving records from those entries, tagging the
//! channel, and choosing the primary installation are verified here.

use crate::models::RobloxInstallation;
use crate::text::{
    contains_seq, lemma_lex_le_antisymmetric, lemma_lex_le_total, lemma_lex_le_transitive, lex_le,
    str_contains, str_eq, str_le,
};
use vstd::prelude::*;

verus! {

/// The lowercase form of a string. Named, not defined: the case mapping
/// belongs to the standard library and depends on the characters alone.
pub uninterp spec fn lower_of(s: Seq<char>) -> Seq<char>;

/// Relies on `str::to_lowercase`: the result is a function of the
/// characters alone.
#[verifier::external_body]
fn to_lowercase_string(s: &str) -> (r: String)
    ensures
        r@ == lower_of(s@),
{
    s.to_lowercase()
}

/// The channel tag of an installation path: a case-insensitive substring
/// test. This is a best-effort heuristic label, not a guarantee — a path
/// can mention either word for other reasons.
pub open spec fn channel_spec(path: Seq<char>) -> Seq<char> {
    if contains_seq(lower_of(path), "studio"@) {
        "Studio"@
    } else if contains_seq(lower_of(path), "player"@) {
        "Player"@
    } else {
        "Unknown"@
    }
}

/// Tag the channel of an installation by its path.
pub fn detect_channel(path: &str) -> (r: String)
    ensures
        r@ == channel_spec(path@),
{
    let low = to_lowercase_string(path);
    if str_contains(low.as_str(), "studio") {
        "Studio".to_owned()
    } else if str_contains(low.as_str(), "player") {
        "Player".to_owned()
    } else {
        "Unknown".to_owned()
    }
}

/// The two executable base names whose parent directory counts as an
/// installation root.
pub open spec fn is_client_binary_name(n: Seq<char>) -> bool {
    n == "RobloxPlayerBeta.exe"@ || n == "RobloxStudioBeta.exe"@
}

/// Whether a file name is one of the two client binaries.
pub fn is_client_binary(name: &str) -> (r: bool)
    ensures
        r == is_client_binary_name(name@),
{
    str_eq(name, "RobloxPlayerBeta.exe") || str_eq(name, "RobloxStudioBeta.exe")
}

/// One filesystem entry as the boundary walker reports it: the entry's base
/// name, its own full path, the parent directory's full path and base name,
/// and the entry's formatted last-modified timestamp.
pub struct ScanEntry {
    pub file_name: String,
    pub full_path: String,
    pub parent_path: String,
    pub parent_name: String,
    pub modified: String,
}

/// The field views of one installation record.
pub open spec fn install_view(r: RobloxInstallation) -> (Seq<char>, Seq<char>, Seq<char>, Seq<
    char,
>) {
    (r.path@, r.version@, r.channel@, r.last_modified@)
}

/// The records a scan denotes: for every entry naming a client binary, the
/// parent directory is the installation root, its base name the version
/// label, the channel tagged from the full path, the timestamp carried
/// through.
pub open spec fn scan_views(es: Seq<ScanEntry>) -> Seq<(Seq<char>, Seq<char>, Seq<char>, Seq<char>)>
    decreases es.len(),
{
    if es.len() == 0 {
        Seq::empty()
    } else {
        let rest = scan_views(es.drop_last());
        if is_client_binary_name(es.last().file_name@) {
            rest.push(
                (
                    es.last().parent_path@,
                    es.last().parent_name@,
                    channel_spec(es.last().full_path@),
                    es.last().modified@,
                ),
            )
        } else {
            rest
        }
    }
}

/// Derive the installation records of one scan. Entries that do not name a
/// client binary contribute nothing; an empty scan yields the empty record
/// list, a valid outcome and not an error.
pub fn records_from_scan(entries: &Vec<ScanEntry>) -> (r: Vec<RobloxInstallation>)
    ensures
        r@.map_values(|x: RobloxInstallation| install_view(x)) == scan_views(entries@),
{
    let mut out: Vec<RobloxInstallation> = Vec::new();
    let mut i: usize = 0;
    proof {
        assert(out@.map_values(|x: RobloxInstallation| install_view(x)) =~= scan_views(
            entries@.subrange(0, 0),
        ));
    }
    while i < entries.len()
        invariant
            i <= entries@.len(),
            out@.map_values(|x: RobloxInstallation| install_view(x)) == scan_views(
                entries@.subrange(0, i as int),
            ),
        decreases entries@.len() - i,
    {
        let e = &entries[i];
        let ghost prev = out@;
        proof {
            assert(entries@.subrange(0, i as int + 1).drop_last() =~= entries@.subrange(
                0,
                i as int,
            ));
            assert(entries@.subrange(0, i as int + 1).last() == entries@[i as int]);
        }
        if is_client_binary(e.file_name.as_str()) {
            let channel = detect_channel(e.full_path.as_str());
            let rec = RobloxInstallation {
                path: e.parent_path.clone(),
                version: e.parent_name.clone(),
                channel,
                last_modified: e.modified.clone(),
            };
            out.push(rec);
            proof {
                assert(out@.drop_last() =~= prev);
                assert(out@.map_values(|x: RobloxInstallation| install_view(x)) =~~= scan_views(
                    entries@.subrange(0, i as int + 1),
                ));
            }
        } else {
            proof {
                assert(out@.map_values(|x: RobloxInstallation| install_view(x)) =~~= scan_views(
                    entries@.subrange(0, i as int + 1),
                ));
            }
        }
        i += 1;
    }
    proof {
        assert(entries@.subrange(0, entries@.len() as int) =~= entries@);
    }
    out
}

/// Choose the primary installation: the record whose last-modified
/// timestamp string is lexicographically greatest (the timestamp format
/// makes that chronological). Returns its index; `None` exactly when the
/// list is empty — the caller turns that into `NotFound` where a primary is
/// required. Among records tying on the timestamp the choice is the first
/// such record; the tie-break is otherwise unspecified by design.
pub fn select_primary(records: &Vec<RobloxInstallation>) -> (r: Option<usize>)
    ensures
        match r {
            Some(i) => i < records@.len() && forall|j: int|
                0 <= j < records@.len() ==> lex_le(
                    #[trigger] records@[j].last_modified@,
                    records@[i as int].last_modified@,
                ),
            None => records@.len() == 0,
        },
{
    if records.len() == 0 {
        return None;
    }
    let mut best: usize = 0;
    let mut j: usize = 1;
    proof {
        lemma_lex_le_total(records@[0].last_modified@, records@[0].last_modified@);
    }
    while j < records.len()
        invariant
            1 <= j <= records@.len(),
            best < j,
            forall|k: int|
                0 <= k < j ==> lex_le(
                    #[trigger] records@[k].last_modified@,
                    records@[best as int].last_modified@,
                ),
        decreases records@.len() - j,
    {
        if str_le(
            records[best].last_modified.as_str(),
            records[j].last_modified.as_str(),
        ) {
            proof {
                assert forall|k: int| 0 <= k < j + 1 implies lex_le(
                    #[trigger] records@[k].last_modified@,
                    records@[j as int].last_modified@,
                ) by {
                    if k < j {
                        lemma_lex_le_transitive(
                            records@[k].last_modified@,
                            records@[best as int].last_modified@,
                            records@[j as int].last_modified@,
                        );
                    } else {
                        lemma_lex_le_total(
                            records@[j as int].last_modified@,
                            records@[j as int].last_modified@,
                        );
                    }
                }
            }
            best = j;
        } else {
            proof {
                lemma_lex_le_total(
                    records@[best as int].last_modified@,
                    records@[j as int].last_modified@,
                );
            }
        }
        j += 1;
    }
    Some(best)
}

/// Selection determinism: with pairwise distinct last-modified values, any
/// two records that both dominate the whole list are one and the same —
/// whatever order the records were scanned in, the selected installation is
/// the one with the greatest timestamp.
pub proof fn lemma_selection_deterministic(records: Seq<RobloxInstallation>, i: int, j: int)
    requires
        0 <= i < records.len(),
        0 <= j < records.len(),
        forall|k: int|
            0 <= k < records.len() ==> lex_le(
                #[trigger] records[k].last_modified@,
                records[i].last_modified@,
            ),
        forall|k: int|
            0 <= k < records.len() ==> lex_le(
                #[trigger] records[k].last_modified@,
                records[j].last_modified@,
            ),
        forall|a: int, b: int|
            0 <= a < b < records.len() ==> records[a].last_modified@ != records[b].last_modified@,
    ensures
        i == j,
        records[i].last_modified@ == records[j].last_modified@,
{
    assert(lex_le(records[i].last_modified@, records[j].last_modified@));
    assert(lex_le(records[j].last_modified@, records[i].last_modified@));
    lemma_lex_le_antisymmetric(records[i].last_modified@, records[j].last_modified@);
    if i < j {
        assert(records[i].last_modified@ != records[j].last_modified@);
    } else if j < i {
        assert(records[j].last_modified@ != records[i].last_modified@);
    }
}

/// The detector and its fixed, configuration-independent search roots: the
/// platform data directories (already joined with the client's folder name
/// by the boundary layer), two fixed absolute fallbacks, and — where the
/// platform offers it — one registry-derived root. A missing source simply
/// contributes no root.
pub struct RobloxDetector {
    pub search_paths: Vec<String>,
}

/// The expected root list, in order.
pub open spec fn expected_roots(
    data_local: Option<Seq<char>>,
    data: Option<Seq<char>>,
    registry: Option<Seq<char>>,
) -> Seq<Seq<char>> {
    let s0 = Seq::<Seq<char>>::empty();
    let s1 = match data_local {
        Some(p) => s0.push(p),
        None => s0,
    };
    let s2 = match data {
        Some(p) => s1.push(p),
        None => s1,
    };
    let s3 = s2.push("C:\\Program Files (x86)\\Roblox"@).push("C:\\Program Files\\Roblox"@);
    match registry {
        Some(p) => s3.push(p),
        None => s3,
    }
}

pub open spec fn opt_string_view(o: Option<String>) -> Option<Seq<char>> {
    match o {
        Some(s) => Some(s@),
        None => None,
    }
}

impl RobloxDetector {
    /// Assemble the search roots from what the boundary layer found.
    pub fn new(
        data_local_root: Option<String>,
        data_root: Option<String>,
        registry_root: Option<String>,
    ) -> (r: RobloxDetector)
        ensures
            r.search_paths@.map_values(|p: String| p@) == expected_roots(
                opt_string_view(data_local_root),
                opt_string_view(data_root),
                opt_string_view(registry_root),
            ),
    {
        let ghost dl = opt_string_view(data_local_root);
        let ghost dd = opt_string_view(data_root);
        let ghost rg = opt_string_view(registry_root);
        let mut search_paths: Vec<String> = Vec::new();
        match data_local_root {
            Some(p) => search_paths.push(p),
            None => {},
        }
        match data_root {
            Some(p) => search_paths.push(p),
            None => {},
        }
        search_paths.push("C:\\Program Files (x86)\\Roblox".to_owned());
        search_paths.push("C:\\Program Files\\Roblox".to_owned());
        match registry_root {
            Some(p) => search_paths.push(p),
            None => {},
        }
        let r = RobloxDetector { search_paths };
        proof {
            assert(r.search_paths@.map_values(|p: String| p@) =~~= expected_roots(dl, dd, rg));
        }
        r
    }
}

} // verus!
