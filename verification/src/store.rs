//! The settings store and the flag overlay: the read-merge-render pipeline
//! over the settings file's text. The boundary layer reads the file (or
//! reports it absent), hands the text in, and writes the returned text
//! back, holding one exclusive lock for the whole of each operation; the
//! external client may still write the file concurrently, an accepted race
//! this subsystem does not solve.

use crate::document::{entries_map, entry_views, SettingsDoc};
use crate::jsonio::{
    json_text_of, parse_settings_text, parsed_text, read_settings_text, render_settings_text,
    scalar_entries, stored_map, text_view, ParsedText,
};
use crate::scalar::{
    coerce_flag_value, coerce_spec, coercion_stable, lemma_coerce_stringify_round_trip,
    lemma_stable_implies_wf, stringify_spec, stringify_value, wf_scalar, ScalarSpec, ScalarValue,
};
use crate::SettingsError;
use vstd::prelude::*;

verus! {

/// The views of an overlay's entries.
pub open spec fn flags_view(fs: Seq<(String, String)>) -> Seq<(Seq<char>, Seq<char>)> {
    fs.map_values(|p: (String, String)| (p.0@, p.1@))
}

/// The keys of an overlay, in order.
pub open spec fn flag_keys(fs: Seq<(String, String)>) -> Seq<Seq<char>> {
    fs.map_values(|p: (String, String)| p.0@)
}

/// The mapping an overlay denotes once each value is coerced.
pub open spec fn coerced_map(fs: Seq<(Seq<char>, Seq<char>)>) -> Map<Seq<char>, ScalarSpec>
    decreases fs.len(),
{
    if fs.len() == 0 {
        Map::empty()
    } else {
        coerced_map(fs.drop_last()).insert(fs.last().0, coerce_spec(fs.last().1))
    }
}

/// Coerce a whole overlay into a partial settings document. The last
/// ensures clause is the overlay round-trip law over the whole map: the
/// string form of every stored value coerces back to the stored value, so
/// reading the overlay after applying it preserves each value's
/// coercion-detectable type.
pub fn overlay_document(flags: &Vec<(String, String)>) -> (r: SettingsDoc)
    requires
        flag_keys(flags@).no_duplicates(),
    ensures
        r.as_map() == coerced_map(flags_view(flags@)),
        r.keys_unique(),
        r.values_wf(),
        r.entries@.len() == flags@.len(),
        forall|i: int|
            0 <= i < flags@.len() ==> #[trigger] r.entries@[i].0@ == flags@[i].0@
                && r.entries@[i].1@ == coerce_spec(flags@[i].1@) && coercion_stable(
                r.entries@[i].1@,
            ),
        forall|i: int|
            0 <= i < flags@.len() ==> coerce_spec(stringify_spec(#[trigger] r.entries@[i].1@))
                == r.entries@[i].1@,
{
    let mut out: Vec<(String, ScalarValue)> = Vec::new();
    let mut i: usize = 0;
    proof {
        assert(entries_map(out@) =~= coerced_map(flags_view(flags@.subrange(0, 0)))) by {
            assert(flags_view(flags@.subrange(0, 0)) =~= Seq::<(Seq<char>, Seq<char>)>::empty());
        }
    }
    while i < flags.len()
        invariant
            i <= flags@.len(),
            flag_keys(flags@).no_duplicates(),
            out@.len() == i,
            entries_map(out@) == coerced_map(flags_view(flags@.subrange(0, i as int))),
            forall|m: int|
                0 <= m < i ==> #[trigger] out@[m].0@ == flags@[m].0@ && out@[m].1@ == coerce_spec(
                    flags@[m].1@,
                ) && coercion_stable(out@[m].1@),
        decreases flags@.len() - i,
    {
        let e = &flags[i];
        let ghost prev = out@;
        let ghost sub_i = flags@.subrange(0, i as int);
        let ghost sub_i1 = flags@.subrange(0, i as int + 1);
        let v = coerce_flag_value(e.1.as_str());
        proof {
            assert(flags_view(sub_i1).drop_last() =~= flags_view(sub_i));
            assert(flags_view(sub_i1).last() == (flags@[i as int].0@, flags@[i as int].1@));
        }
        out.push((e.0.clone(), v));
        proof {
            assert(out@.drop_last() =~= prev);
            assert(entries_map(out@) == entries_map(prev).insert(e.0@, v@));
            assert(entries_map(out@) =~= coerced_map(flags_view(sub_i1)));
        }
        i += 1;
    }
    proof {
        assert(flags@.subrange(0, flags@.len() as int) =~= flags@);
        assert(crate::document::entry_keys(out@) =~= flag_keys(flags@)) by {
            assert(forall|m: int|
                0 <= m < out@.len() ==> crate::document::entry_keys(out@)[m] == #[trigger] out@[m].0@);
        }
        assert(forall|m: int| 0 <= m < out@.len() ==> wf_scalar(#[trigger] out@[m].1@)) by {
            assert forall|m: int| 0 <= m < out@.len() implies wf_scalar(#[trigger] out@[m].1@) by {
                assert(out@[m].0@ == flags@[m].0@ && out@[m].1@ == coerce_spec(flags@[m].1@)
                    && coercion_stable(out@[m].1@));
                lemma_stable_implies_wf(out@[m].1@);
            }
        }
        assert forall|m: int|
            0 <= m < out@.len() implies coerce_spec(stringify_spec(#[trigger] out@[m].1@))
            == out@[m].1@ by {
            assert(out@[m].0@ == flags@[m].0@ && out@[m].1@ == coerce_spec(flags@[m].1@)
                && coercion_stable(out@[m].1@));
            lemma_coerce_stringify_round_trip(out@[m].1@);
        }
    }
    SettingsDoc { entries: out }
}

/// The merge-write core of the settings store: parse the current file text
/// (absent or unreadable recovers as the empty document), apply the partial
/// document key by key — new keys inserted, touched keys overwritten,
/// untouched keys preserved — and render the result as the new file text.
pub fn merge_write_text(current: Option<&str>, partial: &SettingsDoc) -> (r: String)
    requires
        partial.keys_unique(),
        partial.values_wf(),
    ensures
        r@ == json_text_of(stored_map(text_view(current)).union_prefer_right(partial.as_map())),
{
    let base = parse_settings_text(current);
    let merged = base.merged_with(partial);
    render_settings_text(&merged)
}

/// Apply a flag overlay onto the settings file: coerce every value, then
/// merge-write. Returns the new file text.
pub fn apply_flags_text(current: Option<&str>, flags: &Vec<(String, String)>) -> (r: String)
    requires
        flag_keys(flags@).no_duplicates(),
    ensures
        r@ == json_text_of(
            stored_map(text_view(current)).union_prefer_right(coerced_map(flags_view(flags@))),
        ),
{
    let overlay = overlay_document(flags);
    merge_write_text(current, &overlay)
}

/// The overlay read back from parsed object entries: every stored scalar
/// stringified, non-scalar values skipped.
pub open spec fn read_overlay_spec(es: Seq<(Seq<char>, Option<ScalarSpec>)>) -> Seq<
    (Seq<char>, Seq<char>),
>
    decreases es.len(),
{
    if es.len() == 0 {
        Seq::empty()
    } else {
        let rest = read_overlay_spec(es.drop_last());
        match es.last().1 {
            Some(v) => rest.push((es.last().0, stringify_spec(v))),
            None => rest,
        }
    }
}

/// The stringified form of a sequence of scalar entries.
pub open spec fn stringified_entries(s: Seq<(Seq<char>, ScalarSpec)>) -> Seq<
    (Seq<char>, Seq<char>),
> {
    s.map_values(|p: (Seq<char>, ScalarSpec)| (p.0, stringify_spec(p.1)))
}

/// Reading the overlay is stringifying the scalar entries.
proof fn lemma_read_overlay_as_stringified(es: Seq<(Seq<char>, Option<ScalarSpec>)>)
    ensures
        read_overlay_spec(es) == stringified_entries(scalar_entries(es)),
    decreases es.len(),
{
    if es.len() == 0 {
        assert(read_overlay_spec(es) =~= stringified_entries(scalar_entries(es)));
    } else {
        lemma_read_overlay_as_stringified(es.drop_last());
        match es.last().1 {
            Some(v) => {
                assert(scalar_entries(es) == scalar_entries(es.drop_last()).push(
                    (es.last().0, v),
                ));
                assert(read_overlay_spec(es) =~= stringified_entries(scalar_entries(es)));
            },
            None => {
                assert(read_overlay_spec(es) =~= stringified_entries(scalar_entries(es)));
            },
        }
    }
}

/// Read the flag overlay from the settings file's text: every stored scalar
/// stringified, non-scalar values skipped. An absent file reads as the
/// empty overlay; text that is not JSON surfaces as `Malformed` — the
/// explicit read does not recover; a JSON root that is not an object
/// carries no flags.
pub fn read_flags_text(current: Option<&str>) -> (r: Result<Vec<(String, String)>, SettingsError>)
    ensures
        match r {
            Ok(fs) => match text_view(current) {
                None => fs@.len() == 0,
                Some(t) => match parsed_text(t) {
                    ParsedText::Object(es) => flags_view(fs@) == read_overlay_spec(es),
                    ParsedText::NotObject => fs@.len() == 0,
                    ParsedText::Invalid => false,
                },
            },
            Err(e) => {
                &&& e == SettingsError::Malformed
                &&& match text_view(current) {
                    None => false,
                    Some(t) => parsed_text(t) is Invalid,
                }
            },
        },
{
    let text = match current {
        None => {
            return Ok(Vec::new());
        },
        Some(t) => t,
    };
    let doc = match read_settings_text(text) {
        Ok(d) => d,
        Err(e) => {
            return Err(e);
        },
    };
    let mut out: Vec<(String, String)> = Vec::new();
    let mut i: usize = 0;
    proof {
        assert(flags_view(out@) =~= stringified_entries(entry_views(doc.entries@.subrange(0, 0))));
    }
    while i < doc.entries.len()
        invariant
            i <= doc.entries@.len(),
            out@.len() == i,
            flags_view(out@) == stringified_entries(
                entry_views(doc.entries@.subrange(0, i as int)),
            ),
        decreases doc.entries@.len() - i,
    {
        let e = &doc.entries[i];
        let ghost prev = out@;
        let s = stringify_value(&e.1);
        out.push((e.0.clone(), s));
        proof {
            assert(out@.drop_last() =~= prev);
            assert(doc.entries@.subrange(0, i as int + 1).drop_last() =~= doc.entries@.subrange(
                0,
                i as int,
            ));
            assert(entry_views(doc.entries@.subrange(0, i as int + 1)) =~~= entry_views(
                doc.entries@.subrange(0, i as int),
            ).push((doc.entries@[i as int].0@, doc.entries@[i as int].1@)));
            let ghost ev1 = entry_views(doc.entries@.subrange(0, i as int + 1));
            let ghost ev0 = entry_views(doc.entries@.subrange(0, i as int));
            assert(ev0.len() == i);
            assert(ev1.len() == i + 1);
            assert(out@.len() == i + 1);
            assert forall|j: int| 0 <= j < out@.len() implies flags_view(out@)[j]
                == stringified_entries(ev1)[j] by {
                assert(flags_view(out@)[j] == (out@[j].0@, out@[j].1@));
                assert(stringified_entries(ev1)[j] == (ev1[j].0, stringify_spec(ev1[j].1)));
                if j < i {
                    assert(out@[j] == prev[j]);
                    assert(flags_view(prev)[j] == (prev[j].0@, prev[j].1@));
                    assert(flags_view(prev)[j] == stringified_entries(ev0)[j]);
                    assert(stringified_entries(ev0)[j] == (ev0[j].0, stringify_spec(ev0[j].1)));
                    assert(ev1[j] == ev0[j]);
                } else {
                    assert(ev1[j] == (doc.entries@[i as int].0@, doc.entries@[i as int].1@));
                    assert(out@[j].0@ == doc.entries@[i as int].0@);
                    assert(out@[j].1@ == stringify_spec(doc.entries@[i as int].1@));
                }
            }
            assert(flags_view(out@) =~~= stringified_entries(ev1));
        }
        i += 1;
    }
    proof {
        assert(doc.entries@.subrange(0, doc.entries@.len() as int) =~= doc.entries@);
        match parsed_text(text@) {
            ParsedText::Object(es) => {
                lemma_read_overlay_as_stringified(es);
            },
            _ => {},
        }
    }
    Ok(out)
}

/// The string that reading the overlay reports for a just-applied value,
/// with the round-trip law as part of the contract: re-coercing that
/// string yields the same stored scalar, so the coercion-detectable type
/// of every overlay value survives an apply-then-read cycle.
pub fn reencode_flag_value(s: &str) -> (r: String)
    ensures
        r@ == stringify_spec(coerce_spec(s@)),
        coerce_spec(r@) == coerce_spec(s@),
{
    let v = coerce_flag_value(s);
    let out = stringify_value(&v);
    proof {
        lemma_coerce_stringify_round_trip(v@);
    }
    out
}

} // verus!
